//! The processor: the engine's one stateful hub.
//!
//! It owns the fixed output size and the program cache.  Every named
//! operation first makes sure its program is compiled — at most once
//! per name for the processor's lifetime — and then produces a fresh
//! full-sized texture; no operation ever writes into its inputs.

use vstd::prelude::*;

use crate::fixed::ONE;
use crate::gamma::{srgb_decode, srgb_to_linear};
use crate::srgb::SrgbTexture;
use crate::matrix::{tx_pixel, ColorMatrix};
use crate::pixel::{add_spec, diff_spec, mul_spec, pixel_add, pixel_diff, pixel_mul, Pixel};
use crate::texture::{texel, Texture};

verus! {

/// The stable names of the engine's shader programs.
#[derive(Clone, Copy, PartialEq, Eq, Structural, Debug)]
pub enum OpKind {
    Transform,
    Channels,
    Visualize,
    Add,
    Diff,
    Mul,
    Shift,
}

/// The program cache after a request for `k`: compiling is adding the
/// name at the end, and a name already present is reused as it is.
pub open spec fn cache_after(c: Seq<OpKind>, k: OpKind) -> Seq<OpKind> {
    if c.contains(k) {
        c
    } else {
        c.push(k)
    }
}

/// Law: once an operation's program is in the cache, requesting it
/// again changes nothing — so any number of repeated invocations
/// compile the program exactly once.
pub proof fn lemma_cache_reuse(c: Seq<OpKind>, k: OpKind)
    ensures
        cache_after(cache_after(c, k), k) == cache_after(c, k),
        cache_after(c, k).len() <= c.len() + 1,
        cache_after(c, k).contains(k),
{
    if !c.contains(k) {
        assert(c.push(k)[c.len() as int] == k);
        assert(c.push(k).contains(k));
    }
}

/// Executes every texture operation and owns the program cache.
pub struct Processor {
    pub width: u32,
    pub height: u32,
    pub programs: Vec<OpKind>,
}

impl Processor {
    /// The grid is non-empty and small enough for flat indexing, and
    /// no program name is cached twice.
    pub open spec fn wf(self) -> bool {
        &&& self.width >= 1
        &&& self.height >= 1
        &&& self.width * self.height <= 0x1000_0000
        &&& forall|i: int, j: int|
            0 <= i < j < self.programs.len() ==> (#[trigger] self.programs[i]) != (
            #[trigger] self.programs[j])
    }

    /// The number of pixels of a full-sized texture.
    pub open spec fn n_pixels(self) -> int {
        self.width * self.height
    }

    /// Creates a processor for the fixed output size, with an empty
    /// program cache.
    pub fn new(width: u32, height: u32) -> (p: Processor)
        requires
            width >= 1,
            height >= 1,
            width * height <= 0x1000_0000,
        ensures
            p.wf(),
            p.width == width,
            p.height == height,
            p.programs@ == Seq::<OpKind>::empty(),
    {
        Processor { width, height, programs: Vec::new() }
    }

    /// How many programs have been compiled so far; each cached name
    /// was compiled exactly once.
    pub fn n_compiled(&self) -> (n: usize)
        ensures
            n == self.programs.len(),
    {
        self.programs.len()
    }

    /// Looks the name up in the cache and compiles it if absent.
    fn ensure_program(&mut self, k: OpKind)
        requires
            old(self).wf(),
        ensures
            final(self).wf(),
            final(self).width == old(self).width,
            final(self).height == old(self).height,
            final(self).programs@ == cache_after(old(self).programs@, k),
    {
        let n = self.programs.len();
        for i in 0..n
            invariant
                n == self.programs.len(),
                forall|j: int| 0 <= j < i ==> self.programs[j] != k,
                *self == *old(self),
                old(self).wf(),
        {
            if self.programs[i] == k {
                proof {
                    assert(self.programs@.contains(k));
                }
                return ;
            }
        }
        proof {
            assert(!self.programs@.contains(k));
        }
        self.programs.push(k);
        proof {
            assert forall|i: int, j: int|
                0 <= i < j < self.programs.len() implies (#[trigger] self.programs[i]) != (
            #[trigger] self.programs[j]) by {
                if j < old(self).programs.len() {
                } else {
                    assert(self.programs[j] == k);
                    assert(old(self).programs[i] != k);
                }
            }
        }
    }
}

/// The whole-pixel offset a fractional coordinate shift amounts to
/// on a grid of the given extent.
pub open spec fn pixel_offset(d: u64, extent: int) -> int {
    (d * extent) / (ONE as int)
}

/// The flat index the shift operation samples for output position
/// `(x, y)`: both coordinates move by the pixel offset and wrap
/// around the grid.
pub open spec fn shift_source(x: int, y: int, w: int, h: int, dx: u64, dy: u64) -> int {
    ((y + pixel_offset(dy, h)) % h) * w + ((x + pixel_offset(dx, w)) % w)
}

/// A fractional shift below one moves by less than the whole extent.
proof fn lemma_offset_in_extent(d: u64, extent: int)
    requires
        d < ONE,
        extent >= 1,
    ensures
        0 <= pixel_offset(d, extent) < extent,
{
    let o = ONE as int;
    let prod = d * extent;
    assert(0 <= (d as int) * extent <= 999_999 * extent) by (nonlinear_arith)
        requires
            d <= 999_999u64,
            extent >= 1,
    ;
    vstd::arithmetic::div_mod::lemma_fundamental_div_mod(prod, o);
    vstd::arithmetic::div_mod::lemma_mod_bound(prod, o);
    let q = prod / o;
    assert(q >= 0 ==> o * q >= 0) by (nonlinear_arith)
        requires
            o > 0,
    ;
    assert(q < 0 ==> o * q <= -o) by (nonlinear_arith)
        requires
            o > 0,
    ;
}

/// The remainder of a nonnegative value lies inside the grid.
proof fn lemma_mod_in_range(a: int, m: int)
    requires
        a >= 0,
        m > 0,
    ensures
        0 <= a % m < m,
{
    vstd::arithmetic::div_mod::lemma_mod_bound(a, m);
}

/// One pixel of the channel recombination: the red channel of the
/// first source, the green of the second, the blue of the third.
pub open spec fn mix_pixel(a: Pixel, b: Pixel, c: Pixel) -> Pixel {
    Pixel { r: a.r, g: b.g, b: c.b }
}

/// Reads the pixel a full-grid operation samples at flat index `i`.
fn sample(t: &Texture, i: usize) -> (p: Pixel)
    requires
        t.wf(),
        i < t.data.len() || t.data.len() == 1,
    ensures
        p == texel(*t, i as int),
        p.wf(),
{
    if t.data.len() == 1 {
        t.data[0]
    } else {
        t.data[i]
    }
}

impl Processor {
    /// The texture can be an input of an operation on this grid.
    pub open spec fn accepts(self, t: Texture) -> bool {
        t.wf() && t.fits(self.width as int, self.height as int)
    }

    /// What every operation promises about the processor itself:
    /// the size is fixed and the cache only gained the operation's
    /// program.
    pub open spec fn op_effect(self, new: Processor, k: OpKind) -> bool {
        &&& new.wf()
        &&& new.width == self.width
        &&& new.height == self.height
        &&& new.programs@ == cache_after(self.programs@, k)
    }

    /// A freshly produced full-sized well-formed texture.
    pub open spec fn full_output(self, t: Texture) -> bool {
        t.wf() && t.width == self.width && t.height == self.height
    }

    /// Flat sample count of a full-sized texture, as a `usize`.
    fn pixel_count(&self) -> (n: usize)
        requires
            self.wf(),
        ensures
            n == self.n_pixels(),
    {
        (self.width as usize) * (self.height as usize)
    }

    /// Applies a homogeneous color matrix to every sampled pixel.
    pub fn transform(&mut self, t: &Texture, m: &ColorMatrix) -> (out: Texture)
        requires
            old(self).wf(),
            old(self).accepts(*t),
            m.wf(),
        ensures
            old(self).op_effect(*final(self), OpKind::Transform),
            old(self).full_output(out),
            out.data.len() == old(self).n_pixels(),
            forall|i: int|
                0 <= i < out.data.len() ==> out.data[i] == tx_pixel(*m, texel(*t, i)),
    {
        self.ensure_program(OpKind::Transform);
        let n = self.pixel_count();
        let mut data: Vec<Pixel> = Vec::new();
        for i in 0..n
            invariant
                n == self.n_pixels(),
                self.wf(),
                t.wf(),
                t.fits(self.width as int, self.height as int),
                m.wf(),
                data.len() == i,
                forall|j: int| 0 <= j < i ==> data[j] == tx_pixel(*m, texel(*t, j)),
                forall|j: int| 0 <= j < i ==> (#[trigger] data[j]).wf(),
        {
            let p = sample(t, i);
            data.push(m.apply(p));
        }
        Texture { width: self.width, height: self.height, data }
    }

    /// Recombines one channel from each of three sources.
    pub fn channels(&mut self, r: &Texture, g: &Texture, b: &Texture) -> (out: Texture)
        requires
            old(self).wf(),
            old(self).accepts(*r),
            old(self).accepts(*g),
            old(self).accepts(*b),
        ensures
            old(self).op_effect(*final(self), OpKind::Channels),
            old(self).full_output(out),
            out.data.len() == old(self).n_pixels(),
            forall|i: int|
                0 <= i < out.data.len() ==> out.data[i] == mix_pixel(
                    texel(*r, i),
                    texel(*g, i),
                    texel(*b, i),
                ),
    {
        self.ensure_program(OpKind::Channels);
        let n = self.pixel_count();
        let mut data: Vec<Pixel> = Vec::new();
        for i in 0..n
            invariant
                n == self.n_pixels(),
                self.wf(),
                r.wf(),
                g.wf(),
                b.wf(),
                r.fits(self.width as int, self.height as int),
                g.fits(self.width as int, self.height as int),
                b.fits(self.width as int, self.height as int),
                data.len() == i,
                forall|j: int|
                    0 <= j < i ==> data[j] == mix_pixel(texel(*r, j), texel(*g, j), texel(*b, j)),
                forall|j: int| 0 <= j < i ==> (#[trigger] data[j]).wf(),
        {
            let pr = sample(r, i);
            let pg = sample(g, i);
            let pb = sample(b, i);
            data.push(Pixel { r: pr.r, g: pg.g, b: pb.b });
        }
        Texture { width: self.width, height: self.height, data }
    }

    /// Adds two sources pixel by pixel.
    pub fn add(&mut self, a: &Texture, b: &Texture) -> (out: Texture)
        requires
            old(self).wf(),
            old(self).accepts(*a),
            old(self).accepts(*b),
        ensures
            old(self).op_effect(*final(self), OpKind::Add),
            old(self).full_output(out),
            out.data.len() == old(self).n_pixels(),
            forall|i: int|
                0 <= i < out.data.len() ==> out.data[i] == add_spec(texel(*a, i), texel(*b, i)),
    {
        self.ensure_program(OpKind::Add);
        let n = self.pixel_count();
        let mut data: Vec<Pixel> = Vec::new();
        for i in 0..n
            invariant
                n == self.n_pixels(),
                self.wf(),
                a.wf(),
                b.wf(),
                a.fits(self.width as int, self.height as int),
                b.fits(self.width as int, self.height as int),
                data.len() == i,
                forall|j: int| 0 <= j < i ==> data[j] == add_spec(texel(*a, j), texel(*b, j)),
                forall|j: int| 0 <= j < i ==> (#[trigger] data[j]).wf(),
        {
            let pa = sample(a, i);
            let pb = sample(b, i);
            data.push(pixel_add(pa, pb));
        }
        Texture { width: self.width, height: self.height, data }
    }

    /// Subtracts the second source from the first pixel by pixel,
    /// taking the absolute value when `use_abs` is set and clamping
    /// at zero otherwise.
    pub fn diff(&mut self, a: &Texture, b: &Texture, use_abs: bool) -> (out: Texture)
        requires
            old(self).wf(),
            old(self).accepts(*a),
            old(self).accepts(*b),
        ensures
            old(self).op_effect(*final(self), OpKind::Diff),
            old(self).full_output(out),
            out.data.len() == old(self).n_pixels(),
            forall|i: int|
                0 <= i < out.data.len() ==> out.data[i] == diff_spec(
                    texel(*a, i),
                    texel(*b, i),
                    use_abs,
                ),
    {
        self.ensure_program(OpKind::Diff);
        let n = self.pixel_count();
        let mut data: Vec<Pixel> = Vec::new();
        for i in 0..n
            invariant
                n == self.n_pixels(),
                self.wf(),
                a.wf(),
                b.wf(),
                a.fits(self.width as int, self.height as int),
                b.fits(self.width as int, self.height as int),
                data.len() == i,
                forall|j: int|
                    0 <= j < i ==> data[j] == diff_spec(texel(*a, j), texel(*b, j), use_abs),
                forall|j: int| 0 <= j < i ==> (#[trigger] data[j]).wf(),
        {
            let pa = sample(a, i);
            let pb = sample(b, i);
            data.push(pixel_diff(pa, pb, use_abs));
        }
        Texture { width: self.width, height: self.height, data }
    }

    /// Multiplies two sources pixel by pixel.
    pub fn mul(&mut self, a: &Texture, b: &Texture) -> (out: Texture)
        requires
            old(self).wf(),
            old(self).accepts(*a),
            old(self).accepts(*b),
        ensures
            old(self).op_effect(*final(self), OpKind::Mul),
            old(self).full_output(out),
            out.data.len() == old(self).n_pixels(),
            forall|i: int|
                0 <= i < out.data.len() ==> out.data[i] == mul_spec(texel(*a, i), texel(*b, i)),
    {
        self.ensure_program(OpKind::Mul);
        let n = self.pixel_count();
        let mut data: Vec<Pixel> = Vec::new();
        for i in 0..n
            invariant
                n == self.n_pixels(),
                self.wf(),
                a.wf(),
                b.wf(),
                a.fits(self.width as int, self.height as int),
                b.fits(self.width as int, self.height as int),
                data.len() == i,
                forall|j: int| 0 <= j < i ==> data[j] == mul_spec(texel(*a, j), texel(*b, j)),
                forall|j: int| 0 <= j < i ==> (#[trigger] data[j]).wf(),
        {
            let pa = sample(a, i);
            let pb = sample(b, i);
            data.push(pixel_mul(pa, pb));
        }
        Texture { width: self.width, height: self.height, data }
    }

    /// Converts a gamma-encoded byte texture into a linear texture,
    /// decoding every stored byte through the gamma curve the way the
    /// device decodes while sampling.  Runs under the pass-through
    /// program.
    pub fn make_linear(&mut self, s: &SrgbTexture) -> (out: Texture)
        requires
            old(self).wf(),
            s.wf(),
            s.width == old(self).width,
            s.height == old(self).height,
        ensures
            old(self).op_effect(*final(self), OpKind::Visualize),
            old(self).full_output(out),
            out.data.len() == old(self).n_pixels(),
            forall|i: int|
                0 <= i < out.data.len() ==> out.data[i] == (Pixel {
                    r: srgb_decode(s.data[3 * i]) as u64,
                    g: srgb_decode(s.data[3 * i + 1]) as u64,
                    b: srgb_decode(s.data[3 * i + 2]) as u64,
                }),
    {
        self.ensure_program(OpKind::Visualize);
        let n = self.pixel_count();
        proof {
            assert(3 * (s.width as int) * (s.height as int) == 3 * ((s.width as int) * (
            s.height as int))) by (nonlinear_arith);
        }
        let mut data: Vec<Pixel> = Vec::new();
        for i in 0..n
            invariant
                n == self.n_pixels(),
                self.wf(),
                s.wf(),
                s.width == self.width,
                s.height == self.height,
                s.data.len() == 3 * n,
                data.len() == i,
                forall|j: int|
                    0 <= j < i ==> data[j] == (Pixel {
                        r: srgb_decode(s.data[3 * j]) as u64,
                        g: srgb_decode(s.data[3 * j + 1]) as u64,
                        b: srgb_decode(s.data[3 * j + 2]) as u64,
                    }),
                forall|j: int| 0 <= j < data.len() ==> (#[trigger] data[j]).wf(),
        {
            let r = srgb_to_linear(s.data[3 * i]);
            let g = srgb_to_linear(s.data[3 * i + 1]);
            let b = srgb_to_linear(s.data[3 * i + 2]);
            data.push(Pixel { r, g, b });
        }
        Texture { width: self.width, height: self.height, data }
    }

    /// Resamples a texture with its coordinates offset by the
    /// fractions `dx` and `dy` of the grid extent, wrapping around at
    /// the edges.
    pub fn shift(&mut self, t: &Texture, dx: u64, dy: u64) -> (out: Texture)
        requires
            old(self).wf(),
            old(self).accepts(*t),
            dx < ONE,
            dy < ONE,
        ensures
            old(self).op_effect(*final(self), OpKind::Shift),
            old(self).full_output(out),
            out.data.len() == old(self).n_pixels(),
            forall|i: int|
                0 <= i < out.data.len() ==> out.data[i] == texel(
                    *t,
                    shift_source(
                        i % (old(self).width as int),
                        i / (old(self).width as int),
                        old(self).width as int,
                        old(self).height as int,
                        dx,
                        dy,
                    ),
                ),
    {
        self.ensure_program(OpKind::Shift);
        let w = self.width as usize;
        let h = self.height as usize;
        proof {
            assert(dx * (self.width as u64) < 0x10_0000_0000_0000 && dy * (self.height as u64)
                < 0x10_0000_0000_0000) by (nonlinear_arith)
                requires
                    dx < 1_000_000u64,
                    dy < 1_000_000u64,
                    self.width < 0x1_0000_0000u64,
                    self.height < 0x1_0000_0000u64,
            ;
            lemma_offset_in_extent(dx, self.width as int);
            lemma_offset_in_extent(dy, self.height as int);
            assert(w <= 0x1000_0000 && h <= 0x1000_0000) by (nonlinear_arith)
                requires
                    w >= 1,
                    h >= 1,
                    w * h <= 0x1000_0000,
            ;
        }
        let ox: usize = ((dx * (self.width as u64)) / ONE) as usize;
        let oy: usize = ((dy * (self.height as u64)) / ONE) as usize;
        let n = self.pixel_count();
        let mut data: Vec<Pixel> = Vec::new();
        for i in 0..n
            invariant
                w == self.width,
                h == self.height,
                n == w * h,
                w >= 1,
                h >= 1,
                w <= 0x1000_0000,
                h <= 0x1000_0000,
                self.wf(),
                t.wf(),
                t.fits(w as int, h as int),
                ox == pixel_offset(dx, w as int),
                oy == pixel_offset(dy, h as int),
                ox < w,
                oy < h,
                data.len() == i,
                forall|j: int|
                    0 <= j < i ==> data[j] == texel(
                        *t,
                        shift_source(j % (w as int), j / (w as int), w as int, h as int, dx, dy),
                    ),
                forall|j: int| 0 <= j < data.len() ==> (#[trigger] data[j]).wf(),
        {
            let x = i % w;
            let y = i / w;
            proof {
                lemma_mod_in_range(i as int, w as int);
                vstd::arithmetic::div_mod::lemma_fundamental_div_mod(i as int, w as int);
                assert(y < h) by (nonlinear_arith)
                    requires
                        w >= 1,
                        (i as int) == w * y + x,
                        0 <= x < w,
                        i < w * h,
                        y >= 0,
                ;
            }
            let sx = (x + ox) % w;
            let sy = (y + oy) % h;
            proof {
                lemma_mod_in_range(x + ox, w as int);
                lemma_mod_in_range(y + oy, h as int);
                assert(sy * w + sx < h * w) by (nonlinear_arith)
                    requires
                        0 <= sx < w,
                        0 <= sy < h,
                ;
                assert(h * w == w * h) by (nonlinear_arith);
            }
            let src = sy * w + sx;
            let p = sample(t, src);
            data.push(p);
        }
        Texture { width: self.width, height: self.height, data }
    }

    /// Synthesizes the frame that presents a texture: a pass-through
    /// sample of the source onto the full grid.  The caller hands the
    /// frame to the device surface.
    pub fn visualize(&mut self, t: &Texture) -> (out: Texture)
        requires
            old(self).wf(),
            old(self).accepts(*t),
        ensures
            old(self).op_effect(*final(self), OpKind::Visualize),
            old(self).full_output(out),
            out.data.len() == old(self).n_pixels(),
            forall|i: int| 0 <= i < out.data.len() ==> out.data[i] == texel(*t, i),
    {
        self.ensure_program(OpKind::Visualize);
        let n = self.pixel_count();
        let mut data: Vec<Pixel> = Vec::new();
        for i in 0..n
            invariant
                n == self.n_pixels(),
                self.wf(),
                t.wf(),
                t.fits(self.width as int, self.height as int),
                data.len() == i,
                forall|j: int| 0 <= j < i ==> data[j] == texel(*t, j),
                forall|j: int| 0 <= j < i ==> (#[trigger] data[j]).wf(),
        {
            let p = sample(t, i);
            data.push(p);
        }
        Texture { width: self.width, height: self.height, data }
    }
}

} // verus!
