//! The "blended" sample asset: a fixed 16 x 16 RGBA8 picture (two
//! arrows meeting at a vertical bar, drawn from a six-color palette)
//! whose mip pyramid exercises the downsampling pass. The picture is
//! specified as a palette and a per-texel code, and the builder is
//! proved to produce exactly the pyramid of that picture.

use vstd::prelude::*;

use crate::mip::{build_pyramid, pyramid_spec, views_of, MipLevel, MipLevelView};

verus! {

/// The four RGBA8 bytes of palette entry `code`: white, red, dark blue,
/// yellow, green, and steel blue.
pub open spec fn blended_palette(code: int) -> Seq<u8> {
    if code == 0 {
        seq![255u8, 255u8, 255u8, 255u8]
    } else if code == 1 {
        seq![255u8, 0u8, 0u8, 255u8]
    } else if code == 2 {
        seq![0u8, 28u8, 116u8, 255u8]
    } else if code == 3 {
        seq![255u8, 231u8, 0u8, 255u8]
    } else if code == 4 {
        seq![58u8, 181u8, 75u8, 255u8]
    } else {
        seq![38u8, 123u8, 167u8, 255u8]
    }
}

/// The palette code of texel `(x, y)`: the top rows hold a red wedge
/// narrowing around a steel-blue bar on a white ground, the two middle
/// rows split into dark blue and yellow halves, and the bottom rows
/// mirror the wedge around a green bar.
pub open spec fn blended_code(x: int, y: int) -> int {
    if y <= 6 {
        if x == 7 || x == 8 {
            5
        } else if x <= y || x >= 15 - y {
            0
        } else {
            1
        }
    } else if y == 7 {
        if x <= 7 {
            2
        } else if x == 8 {
            5
        } else {
            3
        }
    } else if y == 8 {
        if x <= 6 {
            2
        } else if x == 7 {
            4
        } else {
            3
        }
    } else {
        if x == 7 || x == 8 {
            4
        } else if x <= 15 - y || x >= y {
            0
        } else {
            1
        }
    }
}

/// The fixed 16 x 16 base image, texel by texel.
pub open spec fn blended_base() -> MipLevelView {
    MipLevelView {
        width: 16,
        height: 16,
        data: Seq::new(
            1024,
            |i: int| blended_palette(blended_code((i / 4) % 16, i / 64))[i % 4],
        ),
    }
}

/// The four bytes of palette entry `code`.
fn blended_palette_bytes(code: usize) -> (px: [u8; 4])
    requires
        code <= 5,
    ensures
        forall|c: int| 0 <= c < 4 ==> px@[c] == blended_palette(code as int)[c],
{
    if code == 0 {
        [255, 255, 255, 255]
    } else if code == 1 {
        [255, 0, 0, 255]
    } else if code == 2 {
        [0, 28, 116, 255]
    } else if code == 3 {
        [255, 231, 0, 255]
    } else if code == 4 {
        [58, 181, 75, 255]
    } else {
        [38, 123, 167, 255]
    }
}

/// The palette code of texel `(x, y)`.
fn blended_code_at(x: usize, y: usize) -> (code: usize)
    requires
        x < 16,
        y < 16,
    ensures
        code as int == blended_code(x as int, y as int),
        code <= 5,
{
    if y <= 6 {
        if x == 7 || x == 8 {
            5
        } else if x <= y || x >= 15 - y {
            0
        } else {
            1
        }
    } else if y == 7 {
        if x <= 7 {
            2
        } else if x == 8 {
            5
        } else {
            3
        }
    } else if y == 8 {
        if x <= 6 {
            2
        } else if x == 7 {
            4
        } else {
            3
        }
    } else {
        if x == 7 || x == 8 {
            4
        } else if x <= 15 - y || x >= y {
            0
        } else {
            1
        }
    }
}

/// Builds the 16 x 16 blended base image.
pub fn blended_base_image() -> (m: MipLevel)
    ensures
        m@ == blended_base(),
        m@.wf(),
{
    let mut data: Vec<u8> = Vec::new();
    let mut y: usize = 0;
    while y < 16
        invariant
            y <= 16,
            data@.len() == y * 64,
            forall|i: int| 0 <= i < data@.len() ==> data@[i] == blended_base().data[i],
        decreases 16 - y,
    {
        let mut x: usize = 0;
        while x < 16
            invariant
                y < 16,
                x <= 16,
                data@.len() == y * 64 + x * 4,
                forall|i: int| 0 <= i < data@.len() ==> data@[i] == blended_base().data[i],
            decreases 16 - x,
        {
            let code: usize = blended_code_at(x, y);
            let px: [u8; 4] = blended_palette_bytes(code);
            let mut c: usize = 0;
            while c < 4
                invariant
                    y < 16,
                    x < 16,
                    c <= 4,
                    code <= 5,
                    code as int == blended_code(x as int, y as int),
                    forall|k: int| 0 <= k < 4 ==> px@[k] == blended_palette(code as int)[k],
                    data@.len() == y * 64 + x * 4 + c,
                    forall|i: int| 0 <= i < data@.len() ==> data@[i] == blended_base().data[i],
                decreases 4 - c,
            {
                data.push(px[c]);
                c += 1;
            }
            x += 1;
        }
        y += 1;
    }
    let m: MipLevel = match MipLevel::new(16, data) {
        Ok(m) => m,
        Err(_) => vstd::pervasive::unreached(),
    };
    proof {
        assert(m@ =~= blended_base());
    }
    m
}

/// The mip pyramid of the blended sample image: five levels, from
/// 16 x 16 down to 1 x 1.
pub fn create_blended_mipmap() -> (mips: Vec<MipLevel>)
    ensures
        views_of(mips@) == pyramid_spec(blended_base()),
{
    let base: MipLevel = blended_base_image();
    build_pyramid(base)
}

} // verus!
