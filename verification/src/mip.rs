//! Mip pyramid generation: an RGBA8 image type, an exact bilinear
//! downsampling pass, and the loop that builds the full level sequence.
//!
//! Interpolation weights are represented as exact fractions (numerator
//! over denominator) rather than approximate fixed- or floating-point
//! values, so every destination byte is specified exactly: it is the
//! floor of the mathematical bilinear blend
//! `mix(mix(tl, tr, t1), mix(bl, br, t1), t2)` with `mix(a, b, t) =
//! a + (b - a) * t`, evaluated per channel over the encoded byte values
//! (no gamma correction).

use vstd::prelude::*;

use vstd::arithmetic::power2::pow2;

use crate::GenError;

verus! {

/// Mathematical model of one mip level: dimensions and the row-major
/// interleaved RGBA8 bytes.
#[verifier::ext_equal]
pub ghost struct MipLevelView {
    pub width: int,
    pub height: int,
    pub data: Seq<u8>,
}

impl MipLevelView {
    /// A level is well formed when both dimensions are at least 1 and the
    /// buffer holds exactly 4 bytes per texel.
    pub open spec fn wf(self) -> bool {
        &&& self.width >= 1
        &&& self.height >= 1
        &&& self.data.len() == self.width * self.height * 4
    }
}

/// One mip level: a `width` x `height` image of row-major interleaved
/// RGBA8 bytes, `data.len() == width * height * 4`.
#[derive(Debug)]
pub struct MipLevel {
    width: usize,
    height: usize,
    data: Vec<u8>,
}

impl View for MipLevel {
    type V = MipLevelView;

    closed spec fn view(&self) -> MipLevelView {
        MipLevelView {
            width: self.width as int,
            height: self.height as int,
            data: self.data@,
        }
    }
}

impl MipLevel {
    /// Interprets `data` as an RGBA8 image of the given width, with the
    /// height inferred from the buffer length. The input is rejected as
    /// degenerate when the width is zero, the buffer is empty, or the
    /// length is not a whole number of rows.
    pub fn new(width: usize, data: Vec<u8>) -> (result: Result<MipLevel, GenError>)
        ensures
            result is Ok <==> width >= 1 && data@.len() >= 1 && data@.len() as int % (
            4 * width as int) == 0,
            result matches Ok(m) ==> m@ == (MipLevelView {
                width: width as int,
                height: data@.len() as int / (4 * width as int),
                data: data@,
            }) && m@.wf(),
            result matches Err(e) ==> e == GenError::InvalidParameter,
    {
        if width == 0 || data.len() == 0 {
            return Err(GenError::InvalidParameter);
        }
        let row_bytes: usize = match width.checked_mul(4) {
            Some(r) => r,
            None => {
                // the buffer is shorter than one row, so its length is
                // not a positive multiple of the row size
                proof {
                    lemma_len_mod_oversized_row(data@.len() as int, width as int);
                }
                return Err(GenError::InvalidParameter);
            },
        };
        if data.len() % row_bytes != 0 {
            return Err(GenError::InvalidParameter);
        }
        let height: usize = data.len() / row_bytes;
        proof {
            if data@.len() < row_bytes {
                vstd::arithmetic::div_mod::lemma_small_mod(data@.len() as nat, row_bytes as nat);
            }
            vstd::arithmetic::div_mod::lemma_div_non_zero(data@.len() as int, row_bytes as int);
            vstd::arithmetic::div_mod::lemma_fundamental_div_mod(
                data@.len() as int,
                row_bytes as int,
            );
            assert(width * ((data@.len() as int) / (4 * width as int)) * 4 == (4 * width as int) * (
            (data@.len() as int) / (4 * width as int))) by (nonlinear_arith);
        }
        Ok(MipLevel { width, height, data })
    }

    /// The level's width in texels.
    pub fn width(&self) -> (w: usize)
        ensures
            w == self@.width,
    {
        self.width
    }

    /// The level's height in texels.
    pub fn height(&self) -> (h: usize)
        ensures
            h == self@.height,
    {
        self.height
    }

    /// The level's RGBA8 bytes.
    pub fn data(&self) -> (d: &Vec<u8>)
        ensures
            d@ == self@.data,
    {
        &self.data
    }
}

/// The larger of two integers.
pub open spec fn max_int(a: int, b: int) -> int {
    if a >= b {
        a
    } else {
        b
    }
}

/// The size of one dimension after a halving pass: `max(1, floor(n / 2))`.
pub open spec fn half_dim(n: int) -> int {
    if n >= 2 {
        n / 2
    } else {
        1
    }
}

/// The byte offset of texel `(x, y)` in a row-major RGBA8 buffer of the
/// given width.
pub open spec fn texel_offset(width: int, x: int, y: int) -> int {
    (y * width + x) * 4
}

/// Channel `c` of texel `(x, y)` of a level, with both coordinates
/// clamped to the last valid column and row. The downsampling pass only
/// ever exceeds an edge by one texel, and only with interpolation weight
/// zero, so the clamp never changes a blended value.
pub open spec fn fetch(m: MipLevelView, x: int, y: int, c: int) -> int {
    let xc: int = if x <= m.width - 1 {
        x
    } else {
        m.width - 1
    };
    let yc: int = if y <= m.height - 1 {
        y
    } else {
        m.height - 1
    };
    m.data[texel_offset(m.width, xc, yc) + c] as int
}

/// The numerator, over `den`, of the linear blend
/// `mix(a, b, num/den) = a + (b - a) * num/den`.
pub open spec fn mix_num(a: int, b: int, num: int, den: int) -> int {
    a * (den - num) + b * num
}

/// The floor of the bilinear blend
/// `mix(mix(tl, tr, t1), mix(bl, br, t1), t2)` of one channel of four
/// texels, with exact fractional weights `t1 = n1/d1` and `t2 = n2/d2`.
pub open spec fn bilerp(
    tl: int,
    tr: int,
    bl: int,
    br: int,
    n1: int,
    d1: int,
    n2: int,
    d2: int,
) -> int {
    (mix_num(tl, tr, n1, d1) * (d2 - n2) + mix_num(bl, br, n1, d1) * n2) / (d1 * d2)
}

/// Channel values in `[0, 255]` blended with weights in `[0, 1]` stay in
/// `[0, 255]`.
pub proof fn lemma_bilerp_in_range(
    tl: int,
    tr: int,
    bl: int,
    br: int,
    n1: int,
    d1: int,
    n2: int,
    d2: int,
)
    requires
        0 <= tl <= 255,
        0 <= tr <= 255,
        0 <= bl <= 255,
        0 <= br <= 255,
        0 <= n1 <= d1,
        0 < d1,
        0 <= n2 <= d2,
        0 < d2,
    ensures
        0 <= bilerp(tl, tr, bl, br, n1, d1, n2, d2) <= 255,
{
    let m_top: int = mix_num(tl, tr, n1, d1);
    let m_bot: int = mix_num(bl, br, n1, d1);
    let den: int = d1 * d2;
    let num: int = m_top * (d2 - n2) + m_bot * n2;
    assert(0 <= m_top <= 255 * d1 && 0 <= m_bot <= 255 * d1) by (nonlinear_arith)
        requires
            0 <= tl <= 255,
            0 <= tr <= 255,
            0 <= bl <= 255,
            0 <= br <= 255,
            0 <= n1 <= d1,
            m_top == mix_num(tl, tr, n1, d1),
            m_bot == mix_num(bl, br, n1, d1),
            mix_num(tl, tr, n1, d1) == tl * (d1 - n1) + tr * n1,
            mix_num(bl, br, n1, d1) == bl * (d1 - n1) + br * n1,
    ;
    assert(0 < den && 0 <= num <= 255 * den) by (nonlinear_arith)
        requires
            0 <= m_top <= 255 * d1,
            0 <= m_bot <= 255 * d1,
            0 <= n2 <= d2,
            0 < d1,
            0 < d2,
            den == d1 * d2,
            num == m_top * (d2 - n2) + m_bot * n2,
    ;
    vstd::arithmetic::div_mod::lemma_div_pos_is_pos(num, den);
    vstd::arithmetic::div_mod::lemma_div_is_ordered(num, 255 * den, den);
    vstd::arithmetic::div_mod::lemma_div_multiples_vanish(255, den);
    assert(255 * den == den * 255);
}

/// Sampling exactly at a source texel center, where both interpolation
/// weights are zero, returns that texel's value unchanged.
pub proof fn lemma_bilerp_at_texel_center(tl: int, tr: int, bl: int, br: int, d1: int, d2: int)
    requires
        0 < d1,
        0 < d2,
    ensures
        bilerp(tl, tr, bl, br, 0, d1, 0, d2) == tl,
{
    let den: int = d1 * d2;
    assert(mix_num(tl, tr, 0, d1) * (d2 - 0) + mix_num(bl, br, 0, d1) * 0 == den * tl)
        by (nonlinear_arith)
        requires
            mix_num(tl, tr, 0, d1) == tl * (d1 - 0) + tr * 0,
            mix_num(bl, br, 0, d1) == bl * (d1 - 0) + br * 0,
            den == d1 * d2,
    ;
    assert(0 < den) by (nonlinear_arith)
        requires
            0 < d1,
            0 < d2,
            den == d1 * d2,
    ;
    vstd::arithmetic::div_mod::lemma_div_multiples_vanish(tl, den);
}

/// Blends one channel of four texels with exact fractional weights
/// `t1_num / t1_den` (horizontal) and `t2_num / t2_den` (vertical) and
/// truncates the blend to a byte.
pub fn bilinear_filter_channel(
    tl: u8,
    tr: u8,
    bl: u8,
    br: u8,
    t1_num: u64,
    t1_den: u64,
    t2_num: u64,
    t2_den: u64,
) -> (out: u8)
    requires
        0 < t1_den,
        0 < t2_den,
        t1_num < t1_den,
        t2_num < t2_den,
        t1_den * t2_den <= u64::MAX,
    ensures
        out as int == bilerp(
            tl as int,
            tr as int,
            bl as int,
            br as int,
            t1_num as int,
            t1_den as int,
            t2_num as int,
            t2_den as int,
        ),
{
    let w1: u128 = (t1_den - t1_num) as u128;
    let w2: u128 = (t2_den - t2_num) as u128;
    proof {
        assert((tl as int) * (w1 as int) + (tr as int) * (t1_num as int) <= 255 * (t1_den as int)
            && (bl as int) * (w1 as int) + (br as int) * (t1_num as int) <= 255 * (t1_den as int))
            by (nonlinear_arith)
            requires
                tl <= 255,
                tr <= 255,
                bl <= 255,
                br <= 255,
                0 <= t1_num,
                w1 == t1_den - t1_num,
                0 < t1_den,
        ;
    }
    let top: u128 = (tl as u128) * w1 + (tr as u128) * (t1_num as u128);
    let bot: u128 = (bl as u128) * w1 + (br as u128) * (t1_num as u128);
    proof {
        assert((top as int) * (w2 as int) + (bot as int) * (t2_num as int) <= 255 * ((
        t1_den as int) * (t2_den as int)) && (t1_den as int) * (t2_den as int) >= 1)
            by (nonlinear_arith)
            requires
                0 <= top as int <= 255 * (t1_den as int),
                0 <= bot as int <= 255 * (t1_den as int),
                0 <= t2_num,
                w2 == t2_den - t2_num,
                0 < t1_den,
                0 < t2_den,
        ;
    }
    let num: u128 = top * w2 + bot * (t2_num as u128);
    let den: u128 = (t1_den as u128) * (t2_den as u128);
    let q: u128 = num / den;
    proof {
        lemma_bilerp_in_range(
            tl as int,
            tr as int,
            bl as int,
            br as int,
            t1_num as int,
            t1_den as int,
            t2_num as int,
            t2_den as int,
        );
    }
    q as u8
}

/// Blends four RGBA8 texels channel by channel with exact fractional
/// weights, as the downsampling pass does for each destination texel.
pub fn bilinear_filter(
    tl: &[u8; 4],
    tr: &[u8; 4],
    bl: &[u8; 4],
    br: &[u8; 4],
    t1_num: u64,
    t1_den: u64,
    t2_num: u64,
    t2_den: u64,
) -> (out: [u8; 4])
    requires
        0 < t1_den,
        0 < t2_den,
        t1_num < t1_den,
        t2_num < t2_den,
        t1_den * t2_den <= u64::MAX,
    ensures
        forall|c: int|
            0 <= c < 4 ==> out@[c] as int == bilerp(
                tl@[c] as int,
                tr@[c] as int,
                bl@[c] as int,
                br@[c] as int,
                t1_num as int,
                t1_den as int,
                t2_num as int,
                t2_den as int,
            ),
{
    let out: [u8; 4] = [
        bilinear_filter_channel(tl[0], tr[0], bl[0], br[0], t1_num, t1_den, t2_num, t2_den),
        bilinear_filter_channel(tl[1], tr[1], bl[1], br[1], t1_num, t1_den, t2_num, t2_den),
        bilinear_filter_channel(tl[2], tr[2], bl[2], br[2], t1_num, t1_den, t2_num, t2_den),
        bilinear_filter_channel(tl[3], tr[3], bl[3], br[3], t1_num, t1_den, t2_num, t2_den),
    ];
    out
}

/// One channel of one destination texel of the halving pass. The center
/// of destination texel `(x, y)` maps to the source coordinate
/// `au = (x + 0.5) * srcW / dstW - 0.5` (and likewise for `av`); the
/// channel is the bilinear blend of the four source texels around that
/// point. With `nx = (2x + 1) * srcW - dstW`, the coordinate `au` equals
/// `nx / (2 * dstW)` exactly, so its integer part and fractional weight
/// are exact.
pub open spec fn reduced_channel(src: MipLevelView, x: int, y: int, c: int) -> int {
    let dw: int = half_dim(src.width);
    let dh: int = half_dim(src.height);
    let nx: int = (2 * x + 1) * src.width - dw;
    let ny: int = (2 * y + 1) * src.height - dh;
    let tx: int = nx / (2 * dw);
    let ty: int = ny / (2 * dh);
    bilerp(
        fetch(src, tx, ty, c),
        fetch(src, tx + 1, ty, c),
        fetch(src, tx, ty + 1, c),
        fetch(src, tx + 1, ty + 1, c),
        nx % (2 * dw),
        2 * dw,
        ny % (2 * dh),
        2 * dh,
    )
}

/// The half-resolution level produced from `src` by one bilinear
/// downsampling pass.
pub open spec fn reduce_spec(src: MipLevelView) -> MipLevelView {
    let dw: int = half_dim(src.width);
    let dh: int = half_dim(src.height);
    MipLevelView {
        width: dw,
        height: dh,
        data: Seq::new(
            (dw * dh * 4) as nat,
            |i: int| reduced_channel(src, (i / 4) % dw, i / (4 * dw), i % 4) as u8,
        ),
    }
}

/// The downsampling pass keeps a level well formed.
pub proof fn lemma_reduce_wf(src: MipLevelView)
    requires
        src.wf(),
    ensures
        reduce_spec(src).wf(),
        reduce_spec(src).width == half_dim(src.width),
        reduce_spec(src).height == half_dim(src.height),
{
    assert(half_dim(src.width) * half_dim(src.height) * 4 >= 4) by (nonlinear_arith)
        requires
            half_dim(src.width) >= 1,
            half_dim(src.height) >= 1,
    ;
}

/// Texel `(x, y)` of a `w` x `h` image lies inside the buffer.
proof fn lemma_texel_offset_in_range(w: int, h: int, x: int, y: int, c: int) by (nonlinear_arith)
    requires
        1 <= w,
        1 <= h,
        0 <= x < w,
        0 <= y < h,
        0 <= c < 4,
    ensures
        0 <= y * w + x < w * h,
        0 <= (y * w + x) * 4 + c < w * h * 4,
{
}

/// Decomposing the flat byte index `(y * dw + x) * 4 + c` recovers the
/// channel, column and row it was built from.
proof fn lemma_index_decode(dw: int, x: int, y: int, c: int)
    requires
        1 <= dw,
        0 <= x < dw,
        0 <= y,
        0 <= c < 4,
    ensures
        ((y * dw + x) * 4 + c) / 4 == y * dw + x,
        ((y * dw + x) * 4 + c) % 4 == c,
        (y * dw + x) / dw == y,
        (y * dw + x) % dw == x,
        ((y * dw + x) * 4 + c) / (4 * dw) == y,
{
    let t: int = y * dw + x;
    vstd::arithmetic::div_mod::lemma_fundamental_div_mod_converse(t * 4 + c, 4, t, c);
    vstd::arithmetic::div_mod::lemma_fundamental_div_mod_converse(t, dw, y, x);
    assert(t * 4 + c == y * (4 * dw) + (x * 4 + c) && 0 <= x * 4 + c < 4 * dw)
        by (nonlinear_arith)
        requires
            t == y * dw + x,
            0 <= x < dw,
            0 <= c < 4,
    ;
    vstd::arithmetic::div_mod::lemma_fundamental_div_mod_converse(
        t * 4 + c,
        4 * dw,
        y,
        x * 4 + c,
    );
}

/// Bounds of the destination-to-source coordinate mapping of one
/// dimension: for a destination column `x < dw` the numerator
/// `nx = (2x + 1) * sw - dw` is nonnegative, small enough to compute
/// with, and its integer source column `nx / (2 * dw)` lies inside the
/// image, so the mapping never requests a texel beyond the one-past-edge
/// clamp.
proof fn lemma_src_coord_bounds(sw: int, dw: int, x: int)
    requires
        1 <= sw,
        dw == half_dim(sw),
        0 <= x < dw,
        4 * sw <= 0xFFFF_FFFF_FFFF_FFFF,
    ensures
        1 <= dw <= sw,
        2 * dw <= sw + 1,
        0 <= (2 * x + 1) * sw - dw,
        (2 * x + 1) * sw < 0x2000_0000_0000_0000_0000_0000_0000_0000,
        0 <= ((2 * x + 1) * sw - dw) / (2 * dw) < sw,
        0 <= ((2 * x + 1) * sw - dw) % (2 * dw) < 2 * dw,
{
    let nx: int = (2 * x + 1) * sw - dw;
    let d: int = 2 * dw;
    assert(0 <= nx && nx < d * sw && (2 * x + 1) * sw
        < 0x2000_0000_0000_0000_0000_0000_0000_0000) by (nonlinear_arith)
        requires
            1 <= dw <= sw,
            0 <= x < dw,
            2 * dw <= sw + 1,
            sw <= 0x4000_0000_0000_0000,
            nx == (2 * x + 1) * sw - dw,
            d == 2 * dw,
    ;
    vstd::arithmetic::div_mod::lemma_fundamental_div_mod(nx, d);
    vstd::arithmetic::div_mod::lemma_mod_pos_bound(nx, d);
    vstd::arithmetic::div_mod::lemma_div_pos_is_pos(nx, d);
    assert(nx / d < sw) by (nonlinear_arith)
        requires
            nx == d * (nx / d) + nx % d,
            0 <= nx % d < d,
            nx < d * sw,
            0 < d,
    ;
}

/// Products of the halved dimensions stay within the source buffer's
/// size.
proof fn lemma_dims_bounds(sw: int, sh: int, dw: int, dh: int) by (nonlinear_arith)
    requires
        1 <= dw <= sw,
        1 <= dh <= sh,
    ensures
        1 <= dw * dh,
        4 * (dw * dh) <= sw * sh * 4,
        (2 * dw) * (2 * dh) == 4 * (dw * dh),
        4 * sw <= sw * sh * 4,
        4 * sh <= sw * sh * 4,
{
}

/// Channel `c` of texel `(x, y)` of a level.
fn texel_channel(m: &MipLevel, x: usize, y: usize, c: usize) -> (b: u8)
    requires
        m@.wf(),
        x < m@.width,
        y < m@.height,
        c < 4,
    ensures
        b as int == m@.data[texel_offset(m@.width, x as int, y as int) + c],
{
    proof {
        lemma_texel_offset_in_range(m@.width, m@.height, x as int, y as int, c as int);
        assert(m@.data.len() == m.data.len());
    }
    let idx: usize = (y * m.width + x) * 4 + c;
    m.data[idx]
}

/// Produces the next (half-resolution) mip level from `src`: for every
/// destination texel, the source is sampled bilinearly at the texel
/// center's preimage and the blend is truncated to a byte, channel by
/// channel.
pub fn create_next_mip_level_rgba8_unorm(src: &MipLevel) -> (dst: MipLevel)
    requires
        src@.wf(),
    ensures
        dst@ == reduce_spec(src@),
        dst@.wf(),
{
    let sw: usize = src.width;
    let sh: usize = src.height;
    let dw: usize = if sw >= 2 {
        sw / 2
    } else {
        1
    };
    let dh: usize = if sh >= 2 {
        sh / 2
    } else {
        1
    };
    proof {
        lemma_dims_bounds(sw as int, sh as int, dw as int, dh as int);
        assert(src@.data.len() == src.data.len());
    }
    let d1: u64 = 2 * (dw as u64);
    let d2: u64 = 2 * (dh as u64);
    let mut data: Vec<u8> = Vec::new();
    let mut y: usize = 0;
    while y < dh
        invariant
            src@.wf(),
            sw == src@.width,
            sh == src@.height,
            dw as int == half_dim(src@.width),
            dh as int == half_dim(src@.height),
            1 <= dw <= sw,
            1 <= dh <= sh,
            4 * ((dw as int) * (dh as int)) <= sw * sh * 4,
            sw * sh * 4 <= usize::MAX,
            4 * (sw as int) <= usize::MAX,
            4 * (sh as int) <= usize::MAX,
            d1 == 2 * dw,
            d2 == 2 * dh,
            y <= dh,
            data@.len() == y * (dw * 4),
            forall|i: int| 0 <= i < data@.len() ==> data@[i] == reduce_spec(src@).data[i],
        decreases dh - y,
    {
        proof {
            lemma_src_coord_bounds(sh as int, dh as int, y as int);
        }
        let ny: u128 = (2 * (y as u128) + 1) * (sh as u128) - (dh as u128);
        let ty: usize = (ny / (d2 as u128)) as usize;
        let f2: u64 = (ny % (d2 as u128)) as u64;
        let y2: usize = if ty + 1 <= sh - 1 {
            ty + 1
        } else {
            sh - 1
        };
        let mut x: usize = 0;
        while x < dw
            invariant
                src@.wf(),
                sw == src@.width,
                sh == src@.height,
                dw as int == half_dim(src@.width),
                dh as int == half_dim(src@.height),
                1 <= dw <= sw,
                1 <= dh <= sh,
                4 * ((dw as int) * (dh as int)) <= sw * sh * 4,
                sw * sh * 4 <= usize::MAX,
                4 * (sw as int) <= usize::MAX,
                4 * (sh as int) <= usize::MAX,
                d1 == 2 * dw,
                d2 == 2 * dh,
                y < dh,
                x <= dw,
                ty as int == ((2 * y + 1) * sh - dh) / (2 * dh),
                f2 as int == ((2 * y + 1) * sh - dh) % (2 * dh),
                ty < sh,
                f2 < d2,
                y2 == if ty + 1 <= sh - 1 {
                    ty + 1
                } else {
                    sh - 1
                },
                data@.len() == y * (dw * 4) + x * 4,
                forall|i: int| 0 <= i < data@.len() ==> data@[i] == reduce_spec(src@).data[i],
            decreases dw - x,
        {
            proof {
                lemma_src_coord_bounds(sw as int, dw as int, x as int);
            }
            let nx: u128 = (2 * (x as u128) + 1) * (sw as u128) - (dw as u128);
            let tx: usize = (nx / (d1 as u128)) as usize;
            let f1: u64 = (nx % (d1 as u128)) as u64;
            let x2: usize = if tx + 1 <= sw - 1 {
                tx + 1
            } else {
                sw - 1
            };
            let mut c: usize = 0;
            while c < 4
                invariant
                    src@.wf(),
                    sw == src@.width,
                    sh == src@.height,
                    dw as int == half_dim(src@.width),
                    dh as int == half_dim(src@.height),
                    1 <= dw <= sw,
                    1 <= dh <= sh,
                    4 * ((dw as int) * (dh as int)) <= sw * sh * 4,
                    sw * sh * 4 <= usize::MAX,
                    d1 == 2 * dw,
                    d2 == 2 * dh,
                    y < dh,
                    x < dw,
                    c <= 4,
                    ty as int == ((2 * y + 1) * sh - dh) / (2 * dh),
                    f2 as int == ((2 * y + 1) * sh - dh) % (2 * dh),
                    tx as int == ((2 * x + 1) * sw - dw) / (2 * dw),
                    f1 as int == ((2 * x + 1) * sw - dw) % (2 * dw),
                    ty < sh,
                    tx < sw,
                    f1 < d1,
                    f2 < d2,
                    x2 == if tx + 1 <= sw - 1 {
                        tx + 1
                    } else {
                        sw - 1
                    },
                    y2 == if ty + 1 <= sh - 1 {
                        ty + 1
                    } else {
                        sh - 1
                    },
                    data@.len() == y * (dw * 4) + x * 4 + c,
                    forall|i: int| 0 <= i < data@.len() ==> data@[i] == reduce_spec(src@).data[i],
                decreases 4 - c,
            {
                let tl: u8 = texel_channel(src, tx, ty, c);
                let tr: u8 = texel_channel(src, x2, ty, c);
                let bl: u8 = texel_channel(src, tx, y2, c);
                let br: u8 = texel_channel(src, x2, y2, c);
                proof {
                    assert((d1 as int) * (d2 as int) == 4 * ((dw as int) * (dh as int)))
                        by (nonlinear_arith)
                        requires
                            d1 == 2 * (dw as int),
                            d2 == 2 * (dh as int),
                    ;
                    assert(src@.data.len() == sw * sh * 4);
                    assert((d1 as int) * (d2 as int) <= u64::MAX);
                }
                let v: u8 = bilinear_filter_channel(tl, tr, bl, br, f1, d1, f2, d2);
                proof {
                    let xi: int = x as int;
                    let yi: int = y as int;
                    let ci: int = c as int;
                    let dwi: int = dw as int;
                    lemma_index_decode(dwi, xi, yi, ci);
                    assert(tl as int == fetch(src@, tx as int, ty as int, ci));
                    assert(tr as int == fetch(src@, tx as int + 1, ty as int, ci));
                    assert(bl as int == fetch(src@, tx as int, ty as int + 1, ci));
                    assert(br as int == fetch(src@, tx as int + 1, ty as int + 1, ci));
                    assert(v as int == reduced_channel(src@, xi, yi, ci));
                    assert((yi * dwi + xi) * 4 + ci < dwi * (dh as int) * 4) by (nonlinear_arith)
                        requires
                            0 <= xi < dwi,
                            0 <= yi < dh as int,
                            0 <= ci < 4,
                    ;
                    assert(data@.len() == (yi * dwi + xi) * 4 + ci) by (nonlinear_arith)
                        requires
                            data@.len() == yi * (dwi * 4) + xi * 4 + ci,
                    ;
                    assert(reduce_spec(src@).data[(yi * dwi + xi) * 4 + ci] == v);
                }
                data.push(v);
                c += 1;
            }
            x += 1;
        }
        proof {
            assert((y as int + 1) * ((dw as int) * 4) == y as int * ((dw as int) * 4) + (
            dw as int) * 4) by (nonlinear_arith);
        }
        y += 1;
    }
    proof {
        lemma_reduce_wf(src@);
        assert(data@.len() == (dh as int) * ((dw as int) * 4) && half_dim(src@.width) * half_dim(
            src@.height,
        ) * 4 == (dh as int) * ((dw as int) * 4)) by (nonlinear_arith)
            requires
                data@.len() == (dh as int) * ((dw as int) * 4),
                dw as int == half_dim(src@.width),
                dh as int == half_dim(src@.height),
        ;
        assert(data@ =~= reduce_spec(src@).data);
    }
    let dst: MipLevel = MipLevel { width: dw, height: dh, data };
    proof {
        assert(dst@ =~= reduce_spec(src@));
    }
    dst
}

/// The full mip pyramid of a base level: the base, followed by
/// repeatedly halved levels, ending exactly when a level is 1 x 1 (the
/// 1 x 1 level is always present, and a 1 x 1 base is its own one-level
/// pyramid).
pub open spec fn pyramid_spec(base: MipLevelView) -> Seq<MipLevelView>
    decreases base.width + base.height,
{
    if base.width < 1 || base.height < 1 {
        seq![base]
    } else if base.width == 1 && base.height == 1 {
        seq![base]
    } else {
        seq![base] + pyramid_spec(reduce_spec(base))
    }
}

/// The models of a sequence of levels.
pub open spec fn views_of(levels: Seq<MipLevel>) -> Seq<MipLevelView> {
    levels.map_values(|m: MipLevel| m@)
}

/// Builds the mip pyramid of `base`: the ordered level sequence starting
/// at the base image and halving until the 1 x 1 level, inclusive.
pub fn build_pyramid(base: MipLevel) -> (mips: Vec<MipLevel>)
    requires
        base@.wf(),
    ensures
        views_of(mips@) == pyramid_spec(base@),
{
    let ghost base_view: MipLevelView = base@;
    let mut mips: Vec<MipLevel> = Vec::new();
    let mut cur: MipLevel = base;
    while cur.width() > 1 || cur.height() > 1
        invariant
            cur@.wf(),
            pyramid_spec(base_view) == views_of(mips@) + pyramid_spec(cur@),
        decreases cur@.width + cur@.height,
    {
        let next: MipLevel = create_next_mip_level_rgba8_unorm(&cur);
        proof {
            lemma_reduce_wf(cur@);
            assert(pyramid_spec(cur@) == seq![cur@] + pyramid_spec(next@));
            assert(views_of(mips@.push(cur)) =~= views_of(mips@) + seq![cur@]);
            assert(views_of(mips@.push(cur)) + pyramid_spec(next@) =~= views_of(mips@) + (seq![cur@]
                + pyramid_spec(next@)));
        }
        mips.push(cur);
        cur = next;
    }
    proof {
        assert(pyramid_spec(cur@) == seq![cur@]);
        assert(views_of(mips@.push(cur)) =~= views_of(mips@) + seq![cur@]);
    }
    mips.push(cur);
    mips
}

/// Builds the mip pyramid of a raw RGBA8 byte buffer with the given base
/// width; the base height is inferred as `data.len() / 4 / width`. A
/// degenerate input (zero width, an empty buffer, or a partial row) is
/// rejected without producing any levels.
pub fn generate_mips(data: Vec<u8>, width: usize) -> (result: Result<Vec<MipLevel>, GenError>)
    ensures
        result is Ok <==> width >= 1 && data@.len() >= 1 && data@.len() as int % (
        4 * width as int) == 0,
        result matches Ok(mips) ==> views_of(mips@) == pyramid_spec(
            MipLevelView {
                width: width as int,
                height: data@.len() as int / (4 * width as int),
                data: data@,
            },
        ),
        result matches Err(e) ==> e == GenError::InvalidParameter,
{
    let base: MipLevel = match MipLevel::new(width, data) {
        Ok(m) => m,
        Err(e) => {
            return Err(e);
        },
    };
    Ok(build_pyramid(base))
}

/// Halving a dimension once and then dividing by `2^(k-1)` is the same
/// as dividing by `2^k`, under the floor-at-1 rule.
proof fn lemma_half_dim_pow(w: int, k: int)
    requires
        w >= 1,
        k >= 1,
    ensures
        max_int(1, half_dim(w) / pow2((k - 1) as nat) as int) == max_int(
            1,
            w / pow2(k as nat) as int,
        ),
{
    let p: int = pow2((k - 1) as nat) as int;
    vstd::arithmetic::power2::lemma_pow2_unfold(k as nat);
    vstd::arithmetic::power2::lemma_pow2_pos((k - 1) as nat);
    if w >= 2 {
        vstd::arithmetic::div_mod::lemma_div_denominator(w, 2, p);
    } else {
        if p >= 2 {
            vstd::arithmetic::div_mod::lemma_basic_div(w, p);
        }
        vstd::arithmetic::div_mod::lemma_basic_div(w, 2 * p);
    }
}

/// Dimensional law of the pyramid: level `k` measures exactly
/// `max(1, floor(W / 2^k))` by `max(1, floor(H / 2^k))`, every level is
/// well formed, and exactly the final level is 1 x 1 — the sequence
/// terminates at the first 1 x 1 level, which is always present.
pub proof fn lemma_pyramid_level_dims(base: MipLevelView, k: int)
    requires
        base.wf(),
        0 <= k < pyramid_spec(base).len(),
    ensures
        pyramid_spec(base)[k].wf(),
        pyramid_spec(base)[k].width == max_int(1, base.width / pow2(k as nat) as int),
        pyramid_spec(base)[k].height == max_int(1, base.height / pow2(k as nat) as int),
        k == pyramid_spec(base).len() - 1 <==> pyramid_spec(base)[k].width == 1 && pyramid_spec(
            base,
        )[k].height == 1,
    decreases k,
{
    if k == 0 {
        assert(pow2(0) == 1) by {
            vstd::arithmetic::power2::lemma2_to64();
        }
        assert(pyramid_spec(base)[0] == base);
        assert(base.width / 1 == base.width);
        assert(base.height / 1 == base.height);
        if !(base.width == 1 && base.height == 1) {
            // the pyramid continues, so level 0 is not the last level
            assert(pyramid_spec(reduce_spec(base)).len() >= 1);
        }
    } else {
        lemma_reduce_wf(base);
        assert(pyramid_spec(base)[k] == pyramid_spec(reduce_spec(base))[k - 1]);
        lemma_pyramid_level_dims(reduce_spec(base), k - 1);
        lemma_half_dim_pow(base.width, k);
        lemma_half_dim_pow(base.height, k);
    }
}

/// Length law of the pyramid: a well-formed base yields exactly
/// `floor(log2(max(W, H))) + 1` levels.
pub proof fn lemma_pyramid_len(base: MipLevelView)
    requires
        base.wf(),
    ensures
        pyramid_spec(base).len() == vstd::arithmetic::logarithm::log(
            2,
            max_int(base.width, base.height),
        ) + 1,
    decreases base.width + base.height,
{
    let m: int = max_int(base.width, base.height);
    if base.width == 1 && base.height == 1 {
        vstd::arithmetic::logarithm::lemma_log0(2, 1);
    } else {
        lemma_reduce_wf(base);
        lemma_pyramid_len(reduce_spec(base));
        let hw: int = half_dim(base.width);
        let hh: int = half_dim(base.height);
        assert(max_int(hw, hh) == half_dim(m));
        vstd::arithmetic::logarithm::lemma_log_s(2, m);
    }
}

/// A 1 x 1 base image yields a single-level pyramid holding the base
/// unchanged.
pub proof fn lemma_pyramid_of_unit_base(base: MipLevelView)
    requires
        base.wf(),
        base.width == 1,
        base.height == 1,
    ensures
        pyramid_spec(base) == seq![base],
{
}

/// The pyramid is a pure function of the base image: a byte-identical
/// input of the same dimensions always yields the identical pyramid —
/// there is no randomness and no hidden state.
pub proof fn lemma_pyramid_deterministic(a: MipLevelView, b: MipLevelView)
    requires
        a.width == b.width,
        a.height == b.height,
        a.data == b.data,
    ensures
        pyramid_spec(a) == pyramid_spec(b),
{
    assert(a =~= b);
}

/// A buffer shorter than one row of a `width`-texel image has a length
/// that is not a positive multiple of the row size.
proof fn lemma_len_mod_oversized_row(len: int, width: int)
    requires
        1 <= len,
        len < 4 * width,
    ensures
        len % (4 * width) != 0,
{
    vstd::arithmetic::div_mod::lemma_small_mod(len as nat, (4 * width) as nat);
}

} // verus!
