//! The frame transform of the readback publish path.
//!
//! A frame read back from GL is a contiguous RGBA buffer, 4 bytes per
//! pixel, row-major, with rows ordered bottom-to-top. Publishing needs it
//! top-to-bottom and in BGRA order: a row-wise vertical flip followed by a
//! per-pixel swap of bytes 0 and 2.

use vstd::arithmetic::div_mod::{lemma_fundamental_div_mod, lemma_fundamental_div_mod_converse};
use vstd::prelude::*;

verus! {

/// Byte `i` of the channel-reordered buffer comes from this byte of its
/// input: bytes 0 and 2 of each 4-byte pixel trade places, bytes 1 and 3
/// stay.
pub open spec fn swap_source(i: int) -> int {
    if i % 4 == 0 {
        i + 2
    } else if i % 4 == 2 {
        i - 2
    } else {
        i
    }
}

/// Byte `j` of the vertically flipped buffer comes from this byte of the
/// raw readback: row `y` of the output is row `height - 1 - y` of the
/// source, each row copied verbatim.
pub open spec fn flip_source(j: int, width: int, height: int) -> int {
    let stride = 4 * width;
    (height - 1 - j / stride) * stride + j % stride
}

/// Byte `i` of the published frame, as a function of the raw GL readback.
pub open spec fn published_byte(src: Seq<u8>, width: int, height: int, i: int) -> u8 {
    src[flip_source(swap_source(i), width, height)]
}

/// Pixel (x, y) of the published frame is pixel (x, height - 1 - y) of the
/// source with its R and B channels swapped and its G and A channels
/// unchanged; in particular the published first row is the source's last.
pub proof fn lemma_published_pixel(src: Seq<u8>, width: int, height: int, y: int, x: int)
    requires
        src.len() == width * height * 4,
        0 <= y < height,
        0 <= x < width,
    ensures
        ({
            let d = (y * width + x) * 4;
            let s = ((height - 1 - y) * width + x) * 4;
            &&& published_byte(src, width, height, d) == src[s + 2]
            &&& published_byte(src, width, height, d + 1) == src[s + 1]
            &&& published_byte(src, width, height, d + 2) == src[s]
            &&& published_byte(src, width, height, d + 3) == src[s + 3]
        }),
{
    let stride = 4 * width;
    let d = (y * width + x) * 4;
    let s = ((height - 1 - y) * width + x) * 4;
    assert((y * width + x) * 4 == y * (4 * width) + 4 * x) by (nonlinear_arith);
    assert(((height - 1 - y) * width + x) * 4 == (height - 1 - y) * (4 * width) + 4 * x)
        by (nonlinear_arith);
    assert(d == y * stride + 4 * x && s == (height - 1 - y) * stride + 4 * x && d == (y * width + x)
        * 4 + 0);
    lemma_fundamental_div_mod_converse(d, 4, y * width + x, 0);
    lemma_fundamental_div_mod_converse(d + 1, 4, y * width + x, 1);
    lemma_fundamental_div_mod_converse(d + 2, 4, y * width + x, 2);
    lemma_fundamental_div_mod_converse(d + 3, 4, y * width + x, 3);
    lemma_fundamental_div_mod_converse(d, stride, y, 4 * x);
    lemma_fundamental_div_mod_converse(d + 1, stride, y, 4 * x + 1);
    lemma_fundamental_div_mod_converse(d + 2, stride, y, 4 * x + 2);
    lemma_fundamental_div_mod_converse(d + 3, stride, y, 4 * x + 3);
    assert(swap_source(d) == d + 2 && swap_source(d + 1) == d + 1 && swap_source(d + 2) == d
        && swap_source(d + 3) == d + 3);
    assert(flip_source(d, width, height) == s && flip_source(d + 1, width, height) == s + 1
        && flip_source(d + 2, width, height) == s + 2 && flip_source(d + 3, width, height) == s
        + 3);
}

/// Row-wise vertical flip: row `y` of the output equals row
/// `height - 1 - y` of the source, with each row's bytes copied verbatim.
pub fn flip_vertical(pixels: &Vec<u8>, width: usize, height: usize) -> (out: Vec<u8>)
    requires
        pixels@.len() == width * height * 4,
    ensures
        out@.len() == pixels@.len(),
        forall|j: int|
            0 <= j < out@.len() ==> out@[j] == pixels@[flip_source(
                j,
                width as int,
                height as int,
            )],
{
    let mut out: Vec<u8> = Vec::new();
    if height == 0 {
        return out;
    }
    let len = pixels.len();
    proof {
        assert(4 * (width as int) <= len && (height as int) * (4 * (width as int)) == len)
            by (nonlinear_arith)
            requires
                height >= 1,
                len == (width as int) * (height as int) * 4,
        ;
    }
    let stride: usize = 4 * width;
    let mut y: usize = 0;
    while y < height
        invariant
            pixels@.len() == width * height * 4,
            len == pixels@.len(),
            stride == 4 * width,
            (height as int) * (stride as int) == len,
            y <= height,
            out@.len() == y * stride,
            forall|j: int|
                0 <= j < y * stride ==> out@[j] == pixels@[flip_source(
                    j,
                    width as int,
                    height as int,
                )],
        decreases height - y,
    {
        let src_row = height - 1 - y;
        proof {
            assert((src_row as int) * (stride as int) + (stride as int) <= len)
                by (nonlinear_arith)
                requires
                    src_row == height - 1 - y,
                    y < height,
                    (height as int) * (stride as int) == len,
            ;
        }
        let base: usize = src_row * stride;
        let mut i: usize = 0;
        while i < stride
            invariant
                pixels@.len() == width * height * 4,
                len == pixels@.len(),
                stride == 4 * width,
                (height as int) * (stride as int) == len,
                y < height,
                src_row == height - 1 - y,
                base == src_row * stride,
                base + stride <= len,
                i <= stride,
                out@.len() == y * stride + i,
                forall|j: int|
                    0 <= j < y * stride + i ==> out@[j] == pixels@[flip_source(
                        j,
                        width as int,
                        height as int,
                    )],
            decreases stride - i,
        {
            let b = pixels[base + i];
            out.push(b);
            proof {
                let j = (y * stride + i) as int;
                lemma_fundamental_div_mod_converse(j, stride as int, y as int, i as int);
                assert(flip_source(j, width as int, height as int) == base + i);
            }
            i = i + 1;
        }
        proof {
            assert((y + 1) * (stride as int) == y * (stride as int) + stride) by (nonlinear_arith);
        }
        y = y + 1;
    }
    proof {
        assert(y * stride == len) by (nonlinear_arith)
            requires
                y == height,
                (height as int) * (stride as int) == len,
        ;
    }
    out
}

/// Per-pixel channel reorder between RGBA and BGRA: within each 4-byte
/// pixel, bytes 0 and 2 trade places; bytes 1 and 3 are unchanged.
pub fn byte_swap(data: &mut Vec<u8>)
    requires
        old(data)@.len() % 4 == 0,
    ensures
        final(data)@.len() == old(data)@.len(),
        forall|i: int|
            0 <= i < final(data)@.len() ==> final(data)@[i] == old(data)@[swap_source(i)],
{
    let len = data.len();
    proof {
        lemma_fundamental_div_mod(len as int, 4);
    }
    let n = len / 4;
    let mut p: usize = 0;
    while p < n
        invariant
            data@.len() == len,
            len == old(data)@.len(),
            len == 4 * n,
            p <= n,
            forall|i: int| 0 <= i < 4 * p ==> data@[i] == old(data)@[swap_source(i)],
            forall|i: int| 4 * p <= i < len ==> data@[i] == old(data)@[i],
        decreases n - p,
    {
        let base: usize = 4 * p;
        proof {
            assert(base + 4 <= len) by (nonlinear_arith)
                requires
                    base == 4 * p,
                    p < n,
                    len == 4 * n,
            ;
            lemma_fundamental_div_mod_converse(base as int, 4, p as int, 0);
            lemma_fundamental_div_mod_converse(base as int + 1, 4, p as int, 1);
            lemma_fundamental_div_mod_converse(base as int + 2, 4, p as int, 2);
            lemma_fundamental_div_mod_converse(base as int + 3, 4, p as int, 3);
        }
        let a = data[base];
        let c = data[base + 2];
        data.set(base, c);
        data.set(base + 2, a);
        p = p + 1;
    }
}

/// The full publish transform: vertical flip, then channel reorder. The
/// result is the BGRA, top-to-bottom image of the raw RGBA, bottom-to-top
/// readback.
pub fn prepare_frame(pixels: &Vec<u8>, width: usize, height: usize) -> (out: Vec<u8>)
    requires
        pixels@.len() == width * height * 4,
    ensures
        out@.len() == pixels@.len(),
        forall|i: int|
            0 <= i < out@.len() ==> out@[i] == published_byte(
                pixels@,
                width as int,
                height as int,
                i,
            ),
{
    let mut out = flip_vertical(pixels, width, height);
    proof {
        assert(out@.len() % 4 == 0) by (nonlinear_arith)
            requires
                out@.len() == width * height * 4,
        ;
    }
    let ghost flipped = out@;
    byte_swap(&mut out);
    proof {
        let len = out@.len() as int;
        assert forall|i: int| 0 <= i < len implies out@[i] == published_byte(
            pixels@,
            width as int,
            height as int,
            i,
        ) by {
            assert(0 <= swap_source(i) < len) by (nonlinear_arith)
                requires
                    0 <= i < len,
                    len % 4 == 0,
            ;
            assert(out@[i] == flipped[swap_source(i)]);
        }
    }
    out
}

} // verus!
