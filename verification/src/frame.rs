//! Pixel-buffer transforms for preview frames and window icons:
//! nearest-neighbour downscaling of RGBA frames, and the BGRA-to-RGBA
//! swizzle applied to icon bitmaps.

use vstd::prelude::*;
use vstd::arithmetic::div_mod::{lemma_fundamental_div_mod, lemma_fundamental_div_mod_converse};

verus! {

/// The byte length of a downscaled RGBA frame.
pub open spec fn down_len(width: int, height: int, scale: int) -> int {
    (width / scale) * (height / scale) * 4
}

/// Which source byte the downscaled buffer reads at flat index `k`:
/// byte `k % 4` of the source pixel whose row and column are the
/// destination's, multiplied by the scale factor.
pub open spec fn down_src_index(k: int, width: int, scale: int) -> int {
    let pix = k / 4;
    let c = k % 4;
    let nw = width / scale;
    let y = pix / nw;
    let x = pix % nw;
    (y * scale * width + x * scale) * 4 + c
}

/// The nearest-neighbour downscale of an RGBA frame: every destination
/// pixel is a copy of the source pixel at the scaled coordinates.
pub open spec fn downscaled(src: Seq<u8>, width: int, height: int, scale: int) -> Seq<u8> {
    Seq::new(down_len(width, height, scale) as nat, |k: int| src[down_src_index(k, width, scale)])
}

/// The destination pixel at column `x`, row `y` is the source pixel at
/// column `x * scale`, row `y * scale`, byte for byte.
pub proof fn lemma_downscaled_pixel(
    src: Seq<u8>,
    width: int,
    height: int,
    scale: int,
    y: int,
    x: int,
    c: int,
)
    requires
        scale >= 1,
        0 <= y < height / scale,
        0 <= x < width / scale,
        0 <= c < 4,
    ensures
        downscaled(src, width, height, scale)[(y * (width / scale) + x) * 4 + c] == src[(y * scale
            * width + x * scale) * 4 + c],
{
    let nw = width / scale;
    let nh = height / scale;
    let pix = y * nw + x;
    let k = pix * 4 + c;
    assert(0 <= pix < nw * nh) by (nonlinear_arith)
        requires
            0 <= y < nh,
            0 <= x < nw,
            pix == y * nw + x,
    ;
    assert(0 <= k < nw * nh * 4) by (nonlinear_arith)
        requires
            0 <= pix < nw * nh,
            0 <= c < 4,
            k == pix * 4 + c,
    ;
    lemma_fundamental_div_mod_converse(k, 4, pix, c);
    lemma_fundamental_div_mod_converse(pix, nw, y, x);
}

/// Downscales an RGBA frame by a nearest-neighbour walk, keeping every
/// `scale`-th pixel in each direction.
pub fn downscale_rgba(src: &Vec<u8>, width: usize, height: usize, scale: usize) -> (out: Vec<u8>)
    requires
        scale >= 1,
        src@.len() == width * height * 4,
    ensures
        out@ == downscaled(src@, width as int, height as int, scale as int),
{
    let nw = width / scale;
    let nh = height / scale;
    proof {
        assert(nw == width as int / scale as int);
        assert(nh == height as int / scale as int);
    }
    let src_len = src.len();
    let mut out: Vec<u8> = Vec::new();
    let mut y: usize = 0;
    while y < nh
        invariant
            nw == width as int / scale as int,
            nh == height as int / scale as int,
            scale >= 1,
            src@.len() == width * height * 4,
            src@.len() <= usize::MAX,
            0 <= y <= nh,
            out@.len() == y * nw * 4,
            forall|k: int|
                0 <= k < out@.len() ==> out@[k] == src@[down_src_index(
                    k,
                    width as int,
                    scale as int,
                )],
        decreases nh - y,
    {
        let mut x: usize = 0;
        while x < nw
            invariant
                nw == width as int / scale as int,
                nh == height as int / scale as int,
                scale >= 1,
                src@.len() == width * height * 4,
                src@.len() <= usize::MAX,
                0 <= y < nh,
                0 <= x <= nw,
                out@.len() == (y * nw + x) * 4,
                forall|k: int|
                    0 <= k < out@.len() ==> out@[k] == src@[down_src_index(
                        k,
                        width as int,
                        scale as int,
                    )],
            decreases nw - x,
        {
            proof {
                // the source pixel lies inside the frame
                let w = width as int;
                let h = height as int;
                let s = scale as int;
                let rw = w % s;
                let rh = h % s;
                lemma_fundamental_div_mod(w, s);
                lemma_fundamental_div_mod(h, s);
                assert(y * s <= h - 1 && x * s <= w - 1) by (nonlinear_arith)
                    requires
                        s >= 1,
                        0 <= y < nh,
                        0 <= x < nw,
                        nw == w / s,
                        nh == h / s,
                        w == (w / s) * s + rw,
                        h == (h / s) * s + rh,
                        0 <= rw < s,
                        0 <= rh < s,
                ;
                assert((y * s) * w + x * s <= w * h - 1) by (nonlinear_arith)
                    requires
                        0 <= y * s <= h - 1,
                        0 <= x * s <= w - 1,
                        w >= 1,
                ;
            }
            let row: usize = y * scale;
            let col: usize = x * scale;
            let base: usize = (row * width + col) * 4;
            let ghost k0 = out@.len() as int;
            proof {
                assert((y * nw + x) * 4 + 4 <= nw * nh * 4) by (nonlinear_arith)
                    requires
                        0 <= y < nh,
                        0 <= x < nw,
                ;
            }
            out.push(src[base]);
            out.push(src[base + 1]);
            out.push(src[base + 2]);
            out.push(src[base + 3]);
            proof {
                let pix = y * nw + x;
                assert forall|k: int| k0 <= k < k0 + 4 implies #[trigger] down_src_index(
                    k,
                    width as int,
                    scale as int,
                ) == base + (k - k0) by {
                    lemma_fundamental_div_mod_converse(k, 4, pix, k - k0);
                    lemma_fundamental_div_mod_converse(pix, nw as int, y as int, x as int);
                }
                assert(out@.len() == (y * nw + x + 1) * 4) by (nonlinear_arith)
                    requires
                        out@.len() == k0 + 4,
                        k0 == (y * nw + x) * 4,
                ;
            }
            x = x + 1;
        }
        proof {
            assert((y * nw + nw) * 4 == (y + 1) * nw * 4) by (nonlinear_arith);
        }
        y = y + 1;
    }
    proof {
        assert(out@.len() == nh * nw * 4) by (nonlinear_arith)
            requires
                out@.len() == nh * nw * 4 || out@.len() == nh * nw * 4,
                out@.len() == (nh as int) * (nw as int) * 4,
        ;
        assert(out@ =~= downscaled(src@, width as int, height as int, scale as int)) by {
            assert(down_len(width as int, height as int, scale as int) == nw * nh * 4)
                by (nonlinear_arith)
                requires
                    nw == width as int / scale as int,
                    nh == height as int / scale as int,
            ;
            assert(out@.len() == nw * nh * 4) by (nonlinear_arith)
                requires
                    out@.len() == (nh as int) * (nw as int) * 4,
            ;
        }
    }
    out
}

/// One byte of the BGRA-to-RGBA swizzle: the blue and red channels of
/// each four-byte pixel swap, and a fully transparent pixel with any
/// colour in it becomes opaque.
pub open spec fn swizzle_byte(src: Seq<u8>, k: int) -> u8 {
    let p = 4 * (k / 4);
    let c = k % 4;
    if c == 0 {
        src[p + 2]
    } else if c == 1 {
        src[p + 1]
    } else if c == 2 {
        src[p]
    } else {
        if src[p + 3] == 0 && (src[p] != 0 || src[p + 1] != 0 || src[p + 2] != 0) {
            255u8
        } else {
            src[p + 3]
        }
    }
}

/// A BGRA icon bitmap converted to RGBA.
pub open spec fn swizzled(src: Seq<u8>) -> Seq<u8> {
    Seq::new(src.len(), |k: int| swizzle_byte(src, k))
}

/// Converts a BGRA icon bitmap to RGBA, pixel by pixel.
pub fn bgra_to_rgba(src: &Vec<u8>) -> (out: Vec<u8>)
    requires
        src@.len() % 4 == 0,
    ensures
        out@ == swizzled(src@),
{
    let n = src.len();
    let mut out: Vec<u8> = Vec::new();
    let mut i: usize = 0;
    while i < n
        invariant
            n == src@.len(),
            n % 4 == 0,
            i % 4 == 0,
            0 <= i <= n,
            out@.len() == i,
            forall|k: int| 0 <= k < i ==> out@[k] == swizzle_byte(src@, k),
        decreases n - i,
    {
        proof {
            assert(n - i >= 4) by (nonlinear_arith)
                requires
                    i < n,
                    n as int % 4 == 0,
                    i as int % 4 == 0,
            ;
        }
        let b = src[i];
        let g = src[i + 1];
        let r = src[i + 2];
        let a = src[i + 3];
        out.push(r);
        out.push(g);
        out.push(b);
        if a == 0 && (b != 0 || g != 0 || r != 0) {
            out.push(255);
        } else {
            out.push(a);
        }
        proof {
            let q = i as int / 4;
            assert forall|c: int| 0 <= c < 4 implies 4 * (#[trigger] ((i + c) / 4)) == i && (i + c)
                % 4 == c by {
                lemma_fundamental_div_mod_converse(i + c, 4, q, c);
                assert(i == q * 4) by {
                    lemma_fundamental_div_mod_converse(i as int, 4, q, 0);
                }
            }
        }
        i = i + 4;
    }
    proof {
        assert(out@ =~= swizzled(src@));
    }
    out
}

} // verus!
