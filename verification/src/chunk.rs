//! Tiling support: the chunk (the unit of parallel work), byte
//! quantization of colours, the exact-partition property of the chunk
//! grid, and the copy of a finished chunk into the shared framebuffer.

use vstd::prelude::*;

use crate::fixed::{div_trunc, fx_div_int, fx_div_int_spec, fx_mul, fx_mul_spec, fx_sqrt,
    fx_sqrt_spec, lemma_div_trunc_abs, SCALE};

verus! {

/// How many chunks the image is cut into along each axis.
pub const VERTICAL_PARTITION: usize = 8;

pub const HORIZONTAL_PARTITION: usize = 8;

/// Largest supported image extent; keeps every pixel-coordinate
/// fixed-point conversion inside the scalar range.
pub const MAX_DIM: usize = 16384;

/// An independently rendered rectangular sub-region of the image:
/// pixel-space offsets, extents, the full-image extents, and a private
/// RGBA buffer in row-major order.
pub struct Chunk {
    pub x: usize,
    pub y: usize,
    pub nx: usize,
    pub ny: usize,
    pub start_x: usize,
    pub start_y: usize,
    pub buffer: Vec<u8>,
}

/// A chunk whose rectangle lies inside the image and whose buffer holds
/// four bytes per pixel.
pub open spec fn wf_chunk(c: Chunk) -> bool {
    &&& 1 <= c.x <= MAX_DIM
    &&& 1 <= c.y <= MAX_DIM
    &&& c.start_x + c.nx <= c.x
    &&& c.start_y + c.ny <= c.y
    &&& c.buffer.len() == c.nx * c.ny * 4
}

/// Quantization of one colour channel to a byte, mirroring a saturating
/// cast of `255.99 * c` to `u8`.
pub open spec fn byte_spec(c: int) -> int {
    let t = fx_mul_spec(c, 255_990_000);
    let v = div_trunc(t, SCALE as int);
    if v < 0 {
        0
    } else if v > 255 {
        255
    } else {
        v
    }
}

/// Quantization with gamma-2 correction: the channel's square root is
/// taken before scaling to a byte.
pub open spec fn byte_gamma_spec(c: int) -> int {
    byte_spec(fx_sqrt_spec(c))
}

pub fn to_byte(c: i64) -> (r: u8)
    ensures
        r as int == byte_spec(c as int),
{
    let t = fx_mul(c, 255_990_000);
    let v = fx_div_int(t, SCALE);
    proof {
        lemma_div_trunc_abs(t as int, SCALE as int);
        assert(fx_div_int_spec(t as int, SCALE as int) == div_trunc(t as int, SCALE as int));
    }
    if v < 0 {
        0
    } else if v > 255 {
        255
    } else {
        v as u8
    }
}

pub fn to_byte_gamma(c: i64) -> (r: u8)
    ensures
        r as int == byte_gamma_spec(c as int),
{
    to_byte(fx_sqrt(c))
}

/// The chunk grid partitions the image exactly: a pixel `(px, py)` of an
/// image whose extents are multiples of the chunk extents lies in the
/// chunk `(px / nx, py / ny)` of the grid, and in no other: any grid cell
/// whose rectangle contains the pixel is that one.  So the union of all
/// chunk rectangles covers every pixel exactly once, with no overlap and
/// no gap.
pub proof fn lemma_chunk_partition(
    width: int,
    height: int,
    vp: int,
    hp: int,
    nx: int,
    ny: int,
    px: int,
    py: int,
)
    requires
        nx > 0,
        ny > 0,
        width == vp * nx,
        height == hp * ny,
        0 <= px < width,
        0 <= py < height,
    ensures
        0 <= px / nx < vp,
        0 <= py / ny < hp,
        (px / nx) * nx <= px < (px / nx) * nx + nx,
        (py / ny) * ny <= py < (py / ny) * ny + ny,
        forall|ci: int| #![trigger ci * nx]
            0 <= ci < vp && ci * nx <= px < ci * nx + nx ==> ci == px / nx,
        forall|cj: int| #![trigger cj * ny]
            0 <= cj < hp && cj * ny <= py < cj * ny + ny ==> cj == py / ny,
{
    lemma_axis_partition(width, vp, nx, px);
    lemma_axis_partition(height, hp, ny, py);
}

proof fn lemma_axis_partition(extent: int, parts: int, n: int, p: int)
    requires
        n > 0,
        extent == parts * n,
        0 <= p < extent,
    ensures
        0 <= p / n < parts,
        (p / n) * n <= p < (p / n) * n + n,
        forall|c: int| #![trigger c * n] 0 <= c < parts && c * n <= p < c * n + n ==> c == p / n,
{
    vstd::arithmetic::div_mod::lemma_fundamental_div_mod(p, n);
    vstd::arithmetic::div_mod::lemma_mod_bound(p, n);
    assert((p / n) * n <= p < (p / n) * n + n) by {
        assert(p == n * (p / n) + p % n);
        assert(n * (p / n) == (p / n) * n) by (nonlinear_arith);
    }
    assert(0 <= p / n) by {
        vstd::arithmetic::div_mod::lemma_div_pos_is_pos(p, n);
    }
    assert(p / n < parts) by (nonlinear_arith)
        requires
            (p / n) * n <= p,
            p < parts * n,
            n > 0,
    ;
    assert forall|c: int| 0 <= c < parts && #[trigger] (c * n) <= p < c * n + n implies c == p / n by {
        assert(c == p / n) by (nonlinear_arith)
            requires
                c * n <= p < c * n + n,
                (p / n) * n <= p < (p / n) * n + n,
                n > 0,
        ;
    }
}

/// The framebuffer byte that shows pixel `(px, py)`: rows are stored top
/// to bottom while rendering counts `py` upward from the bottom, so the
/// row is flipped.
pub open spec fn frame_offset(x: int, y: int, px: int, py: int) -> int {
    ((y - py - 1) * x + px) * 4
}

/// The chunk-buffer byte that holds pixel `(px, py)` of a chunk, counted
/// row-major from the chunk's start corner.
pub open spec fn chunk_offset(c: Chunk, px: int, py: int) -> int {
    ((py - c.start_y) * c.nx + (px - c.start_x)) * 4
}

/// Whether a framebuffer byte index lies in the rectangle that the chunk
/// writes back to.
pub open spec fn in_blit_region(c: Chunk, idx: int) -> bool {
    let p = idx / 4;
    let py = c.y - 1 - p / (c.x as int);
    let px = p % (c.x as int);
    &&& c.start_x <= px < c.start_x + c.nx
    &&& c.start_y <= py < c.start_y + c.ny
}

/// Copies the chunk's private buffer into the shared framebuffer at the
/// chunk's offsets, flipping vertically; bytes outside the chunk's
/// rectangle are untouched.
pub fn blit_chunk(buf: &mut Vec<u8>, chunk: &Chunk)
    requires
        wf_chunk(*chunk),
        old(buf).len() == chunk.x * chunk.y * 4,
    ensures
        final(buf).len() == old(buf).len(),
        forall|px: int, py: int, k: int|
            chunk.start_x <= px < chunk.start_x + chunk.nx && chunk.start_y <= py < chunk.start_y
                + chunk.ny && 0 <= k < 4 ==> final(buf)@[frame_offset(
                chunk.x as int,
                chunk.y as int,
                px,
                py,
            ) + k] == chunk.buffer@[#[trigger] (chunk_offset(*chunk, px, py) + k)],
        forall|idx: int|
            0 <= idx < old(buf).len() && !in_blit_region(*chunk, idx) ==> final(buf)@[idx] == old(
                buf,
            )@[idx],
{
    let x = chunk.x;
    let y = chunk.y;
    let nx = chunk.nx;
    let ny = chunk.ny;
    let start_x = chunk.start_x;
    let start_y = chunk.start_y;
    let mut j: usize = 0;
    while j < ny
        invariant
            wf_chunk(*chunk),
            x == chunk.x && y == chunk.y && nx == chunk.nx && ny == chunk.ny,
            start_x == chunk.start_x && start_y == chunk.start_y,
            j <= ny,
            buf.len() == x * y * 4,
            forall|px: int, py: int, k: int|
                start_x <= px < start_x + nx && start_y <= py < start_y + j && 0 <= k < 4
                    ==> buf@[frame_offset(x as int, y as int, px, py) + k] == chunk.buffer@[#[trigger] (chunk_offset(*chunk, px, py) + k)],
            forall|idx: int|
                0 <= idx < buf.len() && !in_blit_region(*chunk, idx) ==> buf@[idx] == old(
                    buf,
                )@[idx],
        decreases ny - j,
    {
        let py = start_y + j;
        proof {
            assert((y - py - 1) as int * (x as int) < 0x4000_0000) by (nonlinear_arith)
                requires
                    1 <= x <= 16384,
                    1 <= y <= 16384,
                    py < y,
            ;
        }
        let row_base = (y - py - 1) * x;
        let mut i: usize = 0;
        while i < nx * 4
            invariant
                wf_chunk(*chunk),
                x == chunk.x && y == chunk.y && nx == chunk.nx && ny == chunk.ny,
                start_x == chunk.start_x && start_y == chunk.start_y,
                j < ny,
                py == start_y + j,
                row_base == (y - py - 1) * x,
                i <= nx * 4,
                buf.len() == x * y * 4,
                forall|px: int, pyy: int, k: int|
                    start_x <= px < start_x + nx && start_y <= pyy < start_y + j && 0 <= k < 4
                        ==> buf@[frame_offset(x as int, y as int, px, pyy) + k] == chunk.buffer@[#[trigger] (chunk_offset(*chunk, px, pyy) + k)],
                forall|px: int, k: int|
                    start_x <= px && 0 <= k < 4 && 4 * (px - start_x) + k < i
                        ==> buf@[frame_offset(x as int, y as int, px, py as int) + k]
                            == chunk.buffer@[#[trigger] (chunk_offset(*chunk, px, py as int) + k)],
                forall|idx: int|
                    0 <= idx < buf.len() && !in_blit_region(*chunk, idx) ==> buf@[idx] == old(
                        buf,
                    )@[idx],
            decreases nx * 4 - i,
        {
            proof {
                assert((((y - py - 1) as int * x as int + start_x as int) * 4 + (i as int)
                    < 0xffff_ffff) && (j as int * (nx as int * 4) + (i as int) < 0xffff_ffff))
                    by (nonlinear_arith)
                    requires
                        1 <= x <= 16384,
                        1 <= y <= 16384,
                        start_x + nx <= x,
                        ny <= y,
                        py < y,
                        j < ny,
                        i < nx * 4,
                ;
            }
            let dst = (row_base + start_x) * 4 + i;
            let src = j * (nx * 4) + i;
            proof {
                lemma_blit_index(*chunk, j as int, i as int);
            }
            let b = chunk.buffer[src];
            buf.set(dst, b);
            proof {
                let xi = x as int;
                let yi = y as int;
                assert forall|px: int, pyy: int, k: int|
                    start_x <= px < start_x + nx && start_y <= pyy < start_y + j && 0 <= k < 4
                        implies buf@[frame_offset(xi, yi, px, pyy) + k] == chunk.buffer@[#[trigger] (
                    chunk_offset(*chunk, px, pyy) + k)] by {
                    assert(0 <= frame_offset(xi, yi, px, pyy) + k < xi * yi * 4)
                        by (nonlinear_arith)
                        requires
                            frame_offset(xi, yi, px, pyy) == ((yi - pyy - 1) * xi + px) * 4,
                            0 <= px < xi,
                            0 <= pyy < yi,
                            0 <= k < 4,
                    ;
                    if frame_offset(xi, yi, px, pyy) + k == dst as int {
                        lemma_frame_offset_injective(
                            xi,
                            yi,
                            px,
                            pyy,
                            k,
                            start_x as int + i as int / 4,
                            py as int,
                            i as int % 4,
                        );
                    }
                }
                assert forall|px: int, k: int|
                    start_x <= px && 0 <= k < 4 && 4 * (px - start_x) + k < i + 1
                        implies buf@[frame_offset(xi, yi, px, py as int) + k] == chunk.buffer@[#[trigger] (
                    chunk_offset(*chunk, px, py as int) + k)] by {
                    assert(0 <= frame_offset(xi, yi, px, py as int) + k < xi * yi * 4)
                        by (nonlinear_arith)
                        requires
                            frame_offset(xi, yi, px, py as int) == ((yi - py - 1) * xi + px) * 4,
                            0 <= px < xi,
                            0 <= py < yi,
                            0 <= k < 4,
                    ;
                    if 4 * (px - start_x) + k < i as int {
                        if frame_offset(xi, yi, px, py as int) + k == dst as int {
                            lemma_frame_offset_injective(
                                xi,
                                yi,
                                px,
                                py as int,
                                k,
                                start_x as int + i as int / 4,
                                py as int,
                                i as int % 4,
                            );
                        }
                    } else {
                        assert(px == start_x as int + i as int / 4 && k == i as int % 4)
                            by (nonlinear_arith)
                            requires
                                4 * (px - start_x as int) + k == i as int,
                                0 <= k < 4,
                                i as int == 4 * (i as int / 4) + i as int % 4,
                                0 <= i as int % 4 < 4,
                        ;
                    }
                }
            }
            i = i + 1;
        }
        j = j + 1;
    }
}

/// A framebuffer byte of pixel `(px, py)` lies in a chunk's write-back
/// region exactly when the pixel lies in the chunk's rectangle.
pub proof fn lemma_region_decode(c: Chunk, px: int, py: int, k: int)
    requires
        wf_chunk(c),
        0 <= px < c.x,
        0 <= py < c.y,
        0 <= k < 4,
    ensures
        in_blit_region(c, frame_offset(c.x as int, c.y as int, px, py) + k) <==> (c.start_x <= px
            < c.start_x + c.nx && c.start_y <= py < c.start_y + c.ny),
{
    let row = c.y - py - 1;
    let idx = frame_offset(c.x as int, c.y as int, px, py) + k;
    assert(idx == (row * c.x + px) * 4 + k);
    assert(0 <= row * c.x + px && row * c.x + px < c.x * c.y) by (nonlinear_arith)
        requires
            0 <= row < c.y,
            0 <= px < c.x,
    ;
    assert(idx / 4 == row * c.x + px && idx % 4 == k) by {
        vstd::arithmetic::div_mod::lemma_fundamental_div_mod_converse(idx, 4, row * c.x + px, k);
    }
    let p = idx / 4;
    assert(p / (c.x as int) == row && p % (c.x as int) == px) by {
        vstd::arithmetic::div_mod::lemma_fundamental_div_mod_converse(p, c.x as int, row, px);
        assert(c.x as int * row == row * c.x) by (nonlinear_arith);
    }
}

/// Distinct pixels (or distinct bytes of one pixel) live at distinct
/// framebuffer indices.
proof fn lemma_frame_offset_injective(
    x: int,
    y: int,
    px1: int,
    py1: int,
    k1: int,
    px2: int,
    py2: int,
    k2: int,
)
    requires
        0 <= px1 < x,
        0 <= px2 < x,
        0 <= k1 < 4,
        0 <= k2 < 4,
        0 <= py1 < y,
        0 <= py2 < y,
        frame_offset(x, y, px1, py1) + k1 == frame_offset(x, y, px2, py2) + k2,
    ensures
        px1 == px2,
        py1 == py2,
        k1 == k2,
{
    let r1 = y - py1 - 1;
    let r2 = y - py2 - 1;
    assert(r1 == r2 && px1 == px2 && k1 == k2) by (nonlinear_arith)
        requires
            (r1 * x + px1) * 4 + k1 == (r2 * x + px2) * 4 + k2,
            0 <= px1 < x,
            0 <= px2 < x,
            0 <= k1 < 4,
            0 <= k2 < 4,
    ;
}

/// Relates the running byte index of the copy loop to the pixel it
/// serves: the destination byte belongs to the blit region, and source
/// and destination line up with the chunk- and frame-offset formulas.
proof fn lemma_blit_index(c: Chunk, j: int, i: int)
    requires
        wf_chunk(c),
        0 <= j < c.ny,
        0 <= i < c.nx * 4,
    ensures
        ({
            let px = c.start_x + i / 4;
            let py = c.start_y + j;
            let k = i % 4;
            let dst = ((c.y - py - 1) * c.x + c.start_x) * 4 + i;
            let src = j * (c.nx * 4) + i;
            &&& c.start_x <= px < c.start_x + c.nx
            &&& 0 <= k < 4
            &&& dst == frame_offset(c.x as int, c.y as int, px, py) + k
            &&& src == chunk_offset(c, px, py) + k
            &&& 0 <= src < c.buffer.len()
            &&& 0 <= dst < c.x * c.y * 4
            &&& in_blit_region(c, dst)
        }),
{
    let px = c.start_x + i / 4;
    let py = c.start_y + j;
    let k = i % 4;
    vstd::arithmetic::div_mod::lemma_fundamental_div_mod(i, 4);
    vstd::arithmetic::div_mod::lemma_mod_bound(i, 4);
    vstd::arithmetic::div_mod::lemma_div_pos_is_pos(i, 4);
    assert(i / 4 < c.nx) by (nonlinear_arith)
        requires
            i < c.nx * 4,
            i == 4 * (i / 4) + i % 4,
            0 <= i % 4 < 4,
            0 <= i / 4,
    ;
    let dst = ((c.y - py - 1) * c.x + c.start_x) * 4 + i;
    let row = c.y - py - 1;
    assert(0 <= row < c.y);
    assert(dst == (row * c.x + px) * 4 + k) by (nonlinear_arith)
        requires
            dst == ((c.y - py - 1) * c.x + c.start_x) * 4 + i,
            row == c.y - py - 1,
            px == c.start_x + i / 4,
            k == i % 4,
            i == 4 * (i / 4) + i % 4,
    ;
    assert(frame_offset(c.x as int, c.y as int, px, py) == (row * c.x + px) * 4);
    let src = j * (c.nx * 4) + i;
    assert(src == ((py - c.start_y) * c.nx + (px - c.start_x)) * 4 + k) by (nonlinear_arith)
        requires
            src == j * (c.nx * 4) + i,
            py == c.start_y + j,
            px == c.start_x + i / 4,
            k == i % 4,
            i == 4 * (i / 4) + i % 4,
    ;
    assert(src < c.nx * c.ny * 4) by (nonlinear_arith)
        requires
            src == j * (c.nx * 4) + i,
            0 <= i < c.nx * 4,
            0 <= j < c.ny,
    ;
    assert(dst < c.x * c.y * 4) by (nonlinear_arith)
        requires
            dst == (row * c.x + px) * 4 + k,
            0 <= row < c.y,
            0 <= px < c.x,
            0 <= k < 4,
    ;
    assert(dst / 4 == row * c.x + px && dst % 4 == k) by {
        vstd::arithmetic::div_mod::lemma_fundamental_div_mod_converse(
            dst,
            4,
            row * c.x + px,
            k,
        );
    }
    let p = dst / 4;
    assert(p / (c.x as int) == row && p % (c.x as int) == px) by {
        vstd::arithmetic::div_mod::lemma_fundamental_div_mod_converse(
            p,
            c.x as int,
            row,
            px,
        );
        assert(c.x as int * row == row * c.x) by (nonlinear_arith);
    }
}

} // verus!
